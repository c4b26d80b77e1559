//! The handler contract and the server's per-connection dispatch.
use vstd::prelude::*;
use crate::request::{ParseError, Request};
use crate::response::Response;
use crate::status_code::StatusCode;

verus! {

/// Turns parsed requests, and parse failures, into responses.
pub trait Handler {
    /// The response to a request that parsed.
    fn handle_request(&mut self, request: &Request) -> Response;

    /// The response to a buffer that did not parse; by default `400 Bad Request`, no body.
    fn handle_bad_request(&mut self, error: &ParseError) -> (r: Response)
        default_ensures
            r@ == (StatusCode::BadRequest, None::<Seq<char>>),
    {
        bad_request(error)
    }
}

/// `400 Bad Request` with no body, whatever the error.
pub fn bad_request(error: &ParseError) -> (r: Response)
    ensures
        r@ == (StatusCode::BadRequest, None::<Seq<char>>),
{
    Response::new(StatusCode::BadRequest, None)
}

/// A server bound to one listening address.
pub struct Server {
    address: String,
}

impl View for Server {
    type V = Seq<char>;

    /// The listening address.
    closed spec fn view(&self) -> Seq<char> {
        self.address@
    }
}

impl Server {
    /// A server for the given address.
    pub fn new(address: String) -> (r: Server)
        ensures
            r@ == address@,
    {
        Server { address }
    }

    /// The listening address.
    pub fn address(&self) -> (r: &str)
        ensures
            r@ == self@,
    {
        self.address.as_str()
    }

    /// The response to one received buffer: the handler's response to the parsed request,
    /// or its response to the parse error.
    pub fn respond<H: Handler>(&self, handler: &mut H, buf: &[u8]) -> Response {
        match Request::try_from(buf) {
            Ok(request) => handler.handle_request(&request),
            Err(e) => handler.handle_bad_request(&e),
        }
    }
}

} // verus!
