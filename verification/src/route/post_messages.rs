//! The write handler: `POST /messages` appends the request body to the log
//! under the peer's address and answers with the fresh snapshot.
use vstd::prelude::*;
use crate::http::{HttpContentType, HttpResult, Request, Response, ResponseView};
use crate::json::byte_len;
use crate::message::message_buffer::{store_add, MessageBuffer};
use crate::route::method::Method;

verus! {

/// The longest message body accepted, in bytes: 160 characters at two bytes
/// each, plus one byte of slack.
pub const MAX_MESSAGE_SIZE: usize = 160 * 2 + 1;

/// The author a write is recorded under: the peer's address, or a fixed
/// fallback when the transport could not resolve one.
pub open spec fn author_of(peer: Option<Seq<char>>) -> Seq<char> {
    match peer {
        Some(p) => p,
        None => "Unknown IP"@,
    }
}

/// Appends the request body to the message log.
pub struct PostMessages {}

impl PostMessages {
    pub fn new() -> Self {
        PostMessages {  }
    }

    /// The path this handler serves.
    pub fn route(&self) -> (r: &'static str)
        ensures
            r@ == "/messages"@,
    {
        "/messages"
    }

    /// The method this handler serves.
    pub fn method(&self) -> (r: Method)
        ensures
            r == Method::POST,
    {
        Method::POST
    }

    /// A request without a body is rejected with `400`, as is one whose body
    /// is longer than `MAX_MESSAGE_SIZE` bytes; the store is then untouched.
    /// Any other body, the boundary length included, is appended under the
    /// peer's address, and the answer is the snapshot of the grown log.
    pub fn handle(&self, request: Request, store: &mut MessageBuffer) -> (r: Response)
        ensures
            match request@.data {
                None => final(store)@ == old(store)@ && r@ == (ResponseView {
                    status: HttpResult::InvalidRequest,
                    content_type: HttpContentType::Html,
                    data: "No message given"@,
                }),
                Some(d) => if byte_len(d) > MAX_MESSAGE_SIZE as int {
                    final(store)@ == old(store)@ && r@ == (ResponseView {
                        status: HttpResult::InvalidRequest,
                        content_type: HttpContentType::Html,
                        data: "Message too long"@,
                    })
                } else {
                    final(store)@ == store_add(old(store)@, author_of(request@.peer), d) && r@
                        == (ResponseView {
                        status: HttpResult::Success,
                        content_type: HttpContentType::Json,
                        data: final(store)@.cache,
                    })
                },
            },
            old(store).wf() ==> final(store).wf(),
    {
        let author = match &request.peer {
            Some(p) => p.clone(),
            None => "Unknown IP".to_owned(),
        };
        match &request.data {
            Some(data) => {
                if data.as_str().as_bytes().len() > MAX_MESSAGE_SIZE {
                    return Response {
                        status: HttpResult::InvalidRequest,
                        content_type: HttpContentType::Html,
                        data: "Message too long".to_owned(),
                    };
                }
                store.add_message(author, data.clone());
            },
            None => {
                return Response {
                    status: HttpResult::InvalidRequest,
                    content_type: HttpContentType::Html,
                    data: "No message given".to_owned(),
                };
            },
        }
        Response {
            status: HttpResult::Success,
            content_type: HttpContentType::Json,
            data: store.cached(),
        }
    }
}

} // verus!
