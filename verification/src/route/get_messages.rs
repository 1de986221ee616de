//! The read handler: `GET /messages` answers with the cached JSON snapshot.
use vstd::prelude::*;
use crate::http::{HttpContentType, HttpResult, Request, Response, ResponseView};
use crate::message::message_buffer::MessageBuffer;
use crate::route::method::Method;

verus! {

/// Serves the current snapshot of the message log.
pub struct GetMessages {}

impl GetMessages {
    pub fn new() -> Self {
        GetMessages {  }
    }

    /// The path this handler serves.
    pub fn route(&self) -> (r: &'static str)
        ensures
            r@ == "/messages"@,
    {
        "/messages"
    }

    /// The method this handler serves.
    pub fn method(&self) -> (r: Method)
        ensures
            r == Method::GET,
    {
        Method::GET
    }

    /// Answers with the cached snapshot, verbatim, and changes nothing.
    pub fn handle(&self, _request: Request, store: &MessageBuffer) -> (r: Response)
        ensures
            r@ == (ResponseView {
                status: HttpResult::Success,
                content_type: HttpContentType::Json,
                data: store@.cache,
            }),
    {
        Response {
            status: HttpResult::Success,
            content_type: HttpContentType::Json,
            data: store.cached(),
        }
    }
}

} // verus!
