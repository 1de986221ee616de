//! The handler variants the router can register: fixed static content, the
//! read of the snapshot, and the size-checked write.
use vstd::prelude::*;
use crate::http::{HttpContentType, HttpResult, Request, RequestView, Response, ResponseView};
use crate::json::byte_len;
use crate::message::message_buffer::{store_add, MessageBuffer, StoreModel};
use crate::route::get_messages::GetMessages;
use crate::route::method::Method;
use crate::route::post_messages::{author_of, PostMessages, MAX_MESSAGE_SIZE};

verus! {

/// Serves one fixed body under one path and method, unconditionally.
pub struct StaticRoute {
    route: String,
    method: Method,
    content_type: HttpContentType,
    content: String,
}

impl StaticRoute {
    /// The path this handler serves.
    pub closed spec fn route_spec(self) -> Seq<char> {
        self.route@
    }

    /// The method this handler serves.
    pub closed spec fn method_spec(self) -> Method {
        self.method
    }

    /// The content type of the fixed body.
    pub closed spec fn content_type_spec(self) -> HttpContentType {
        self.content_type
    }

    /// The fixed body.
    pub closed spec fn content_spec(self) -> Seq<char> {
        self.content@
    }

    pub fn new(route: &str, method: Method, content_type: HttpContentType, content: &str) -> (r:
        Self)
        ensures
            r.route_spec() == route@,
            r.method_spec() == method,
            r.content_type_spec() == content_type,
            r.content_spec() == content@,
    {
        StaticRoute { route: route.to_owned(), method, content_type, content: content.to_owned() }
    }

    pub fn route(&self) -> (r: &str)
        ensures
            r@ == self.route_spec(),
    {
        self.route.as_str()
    }

    pub fn method(&self) -> (r: Method)
        ensures
            r == self.method_spec(),
    {
        self.method
    }

    /// Answers with the fixed body and `200`, whatever the request holds.
    pub fn handle(&self, _request: Request) -> (r: Response)
        ensures
            r@ == (ResponseView {
                status: HttpResult::Success,
                content_type: self.content_type_spec(),
                data: self.content_spec(),
            }),
    {
        Response {
            status: HttpResult::Success,
            content_type: self.content_type,
            data: self.content.clone(),
        }
    }
}

/// The closed set of handlers the router dispatches to.
pub enum Handler {
    StaticContent(StaticRoute),
    ReadMessages(GetMessages),
    WriteMessage(PostMessages),
}

impl Handler {
    /// The path the handler serves.
    pub open spec fn route_spec(self) -> Seq<char> {
        match self {
            Handler::StaticContent(s) => s.route_spec(),
            Handler::ReadMessages(_) => "/messages"@,
            Handler::WriteMessage(_) => "/messages"@,
        }
    }

    /// The method the handler serves.
    pub open spec fn method_spec(self) -> Method {
        match self {
            Handler::StaticContent(s) => s.method_spec(),
            Handler::ReadMessages(_) => Method::GET,
            Handler::WriteMessage(_) => Method::POST,
        }
    }

    /// Whether the handler serves the given path and method.
    pub fn matches_request(&self, path: &String, method: Method) -> (b: bool)
        ensures
            b == handler_matches_at(*self, path@, method),
    {
        match self {
            Handler::StaticContent(s) => *path == s.route && method == s.method,
            Handler::ReadMessages(_) => *path == "/messages".to_owned() && method == Method::GET,
            Handler::WriteMessage(_) => *path == "/messages".to_owned() && method == Method::POST,
        }
    }

    /// Invokes the handler: the store and the response come out exactly as
    /// `handler_effect` states.
    pub fn handle(&self, request: Request, store: &mut MessageBuffer) -> (r: Response)
        ensures
            (final(store)@, r@) == handler_effect(*self, request@, old(store)@),
            old(store).wf() ==> final(store).wf(),
    {
        match self {
            Handler::StaticContent(s) => s.handle(request),
            Handler::ReadMessages(g) => g.handle(request, store),
            Handler::WriteMessage(p) => p.handle(request, store),
        }
    }
}

/// Whether a handler serves the given path and method.
pub open spec fn handler_matches_at(h: Handler, path: Seq<char>, method: Method) -> bool {
    h.route_spec() == path && h.method_spec() == method
}

/// Whether a handler serves the given request.
pub open spec fn handler_matches(h: Handler, req: RequestView) -> bool {
    handler_matches_at(h, req.path, req.method)
}

/// What invoking a handler does: the store after the call, and the response.
/// Static content and reads leave the store as it is; a write appends the
/// body to the log when it is present and short enough, and is rejected with
/// `400` otherwise.
pub open spec fn handler_effect(h: Handler, req: RequestView, s: StoreModel) -> (
    StoreModel,
    ResponseView,
) {
    match h {
        Handler::StaticContent(st) => (
            s,
            ResponseView {
                status: HttpResult::Success,
                content_type: st.content_type_spec(),
                data: st.content_spec(),
            },
        ),
        Handler::ReadMessages(_) => (
            s,
            ResponseView {
                status: HttpResult::Success,
                content_type: HttpContentType::Json,
                data: s.cache,
            },
        ),
        Handler::WriteMessage(_) => match req.data {
            None => (
                s,
                ResponseView {
                    status: HttpResult::InvalidRequest,
                    content_type: HttpContentType::Html,
                    data: "No message given"@,
                },
            ),
            Some(d) => if byte_len(d) > MAX_MESSAGE_SIZE as int {
                (
                    s,
                    ResponseView {
                        status: HttpResult::InvalidRequest,
                        content_type: HttpContentType::Html,
                        data: "Message too long"@,
                    },
                )
            } else {
                let s2 = store_add(s, author_of(req.peer), d);
                (
                    s2,
                    ResponseView {
                        status: HttpResult::Success,
                        content_type: HttpContentType::Json,
                        data: s2.cache,
                    },
                )
            },
        },
    }
}

} // verus!
