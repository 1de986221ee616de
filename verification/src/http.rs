//! Request, response and status types of the HTTP surface, and the router
//! that maps a `(path, method)` pair to the handler registered for it.
use vstd::prelude::*;
use crate::message::message_buffer::MessageBuffer;
use crate::route::method::Method;
use crate::route::route::{handler_effect, handler_matches, handler_matches_at, Handler};

verus! {

/// The status of a response.
#[derive(Debug, Clone, Copy, PartialEq, Eq, Structural)]
pub enum HttpResult {
    Success,
    InvalidRequest,
    InternalServerError,
}

impl HttpResult {
    /// The numeric code the status is sent as.
    pub open spec fn code_spec(self) -> u16 {
        match self {
            HttpResult::Success => 200,
            HttpResult::InvalidRequest => 400,
            HttpResult::InternalServerError => 500,
        }
    }

    pub fn code(&self) -> (r: u16)
        ensures
            r == self.code_spec(),
    {
        match self {
            HttpResult::Success => 200,
            HttpResult::InvalidRequest => 400,
            HttpResult::InternalServerError => 500,
        }
    }
}

/// The content type of a response body.
#[derive(Debug, Clone, Copy, PartialEq, Eq, Structural)]
pub enum HttpContentType {
    Html,
    Javascript,
    Stylesheet,
    Json,
}

impl HttpContentType {
    /// The MIME name the content type is sent as.
    pub open spec fn mime_spec(self) -> Seq<char> {
        match self {
            HttpContentType::Html => "text/html"@,
            HttpContentType::Stylesheet => "text/css"@,
            HttpContentType::Javascript => "application/javascript"@,
            HttpContentType::Json => "application/json"@,
        }
    }

    pub fn mime(&self) -> (r: &'static str)
        ensures
            r@ == self.mime_spec(),
    {
        match self {
            HttpContentType::Html => "text/html",
            HttpContentType::Stylesheet => "text/css",
            HttpContentType::Javascript => "application/javascript",
            HttpContentType::Json => "application/json",
        }
    }
}

/// A status together with a human-readable message.
#[derive(Debug, Clone)]
pub struct HttpError {
    pub status: HttpResult,
    pub message: String,
}

impl HttpError {
    pub fn new(status: HttpResult, message: String) -> (r: Self)
        ensures
            r.status == status,
            r.message == message,
    {
        HttpError { status, message }
    }
}

/// One inbound request, as the transport hands it over: the requested path
/// and method, the body if one could be read, and the peer's address if it
/// could be resolved.
pub struct Request {
    pub path: String,
    pub method: Method,
    pub data: Option<String>,
    pub peer: Option<String>,
}

/// The mathematical content of a `Request`.
pub ghost struct RequestView {
    pub path: Seq<char>,
    pub method: Method,
    pub data: Option<Seq<char>>,
    pub peer: Option<Seq<char>>,
}

impl View for Request {
    type V = RequestView;

    open spec fn view(&self) -> RequestView {
        RequestView {
            path: self.path@,
            method: self.method,
            data: match self.data {
                Some(d) => Some(d@),
                None => None,
            },
            peer: match self.peer {
                Some(p) => Some(p@),
                None => None,
            },
        }
    }
}

/// One outbound response: status, content type and body.
pub struct Response {
    pub status: HttpResult,
    pub content_type: HttpContentType,
    pub data: String,
}

/// The mathematical content of a `Response`.
pub ghost struct ResponseView {
    pub status: HttpResult,
    pub content_type: HttpContentType,
    pub data: Seq<char>,
}

impl View for Response {
    type V = ResponseView;

    open spec fn view(&self) -> ResponseView {
        ResponseView { status: self.status, content_type: self.content_type, data: self.data@ }
    }
}

/// The registry of handlers: routes are added once at startup, and each
/// inbound request is dispatched to the registered handler whose path and
/// method match it exactly.
pub struct HttpServer {
    routes: Vec<Handler>,
}

impl HttpServer {
    /// The handlers registered so far, in registration order.
    pub closed spec fn registered(self) -> Seq<Handler> {
        self.routes@
    }

    /// A server with no routes.
    pub fn new() -> (r: Self)
        ensures
            r.registered() == Seq::<Handler>::empty(),
    {
        HttpServer { routes: Vec::new() }
    }

    /// Registers one handler. A later registration for the same path and
    /// method wins over an earlier one.
    pub fn add_route(&mut self, route: Handler)
        ensures
            final(self).registered() == old(self).registered().push(route),
    {
        self.routes.push(route);
    }

    /// The index of the handler a request is dispatched to: the last
    /// registered one whose path and method match, or none.
    fn find_route(&self, path: &String, method: Method) -> (r: Option<usize>)
        ensures
            match r {
                Some(i) => i < self.registered().len() && handler_matches_at(
                    self.registered()[i as int],
                    path@,
                    method,
                ) && (forall|j: int|
                    i < j < self.registered().len() ==> !handler_matches_at(
                        #[trigger] self.registered()[j],
                        path@,
                        method,
                    )),
                None => forall|j: int|
                    0 <= j < self.registered().len() ==> !handler_matches_at(
                        #[trigger] self.registered()[j],
                        path@,
                        method,
                    ),
            },
    {
        let n = self.routes.len();
        let mut i = n;
        while i > 0
            invariant
                i <= n,
                n == self.registered().len(),
                forall|j: int|
                    i <= j < n ==> !handler_matches_at(
                        #[trigger] self.registered()[j],
                        path@,
                        method,
                    ),
            decreases i,
        {
            i = i - 1;
            if self.routes[i].matches_request(path, method) {
                return Some(i);
            }
        }
        None
    }

    /// Resolves the handler for the request and invokes it on the store,
    /// returning its response; `None` when no registered route matches, in
    /// which case the store is untouched and the transport's own "not found"
    /// answer applies.
    pub fn dispatch(&self, request: Request, store: &mut MessageBuffer) -> (r: Option<Response>)
        ensures
            (r is None) <==> (forall|j: int|
                0 <= j < self.registered().len() ==> !handler_matches(
                    #[trigger] self.registered()[j],
                    request@,
                )),
            r is None ==> final(store)@ == old(store)@,
            r matches Some(resp) ==> exists|i: int|
                0 <= i < self.registered().len() && #[trigger] handler_matches(
                    self.registered()[i],
                    request@,
                ) && (forall|j: int|
                    i < j < self.registered().len() ==> !handler_matches(
                        #[trigger] self.registered()[j],
                        request@,
                    )) && (final(store)@, resp@) == handler_effect(
                    self.registered()[i],
                    request@,
                    old(store)@,
                ),
            old(store).wf() ==> final(store).wf(),
    {
        match self.find_route(&request.path, request.method) {
            Some(i) => {
                let ghost rv = request@;
                let ghost s0 = store@;
                let resp = self.routes[i].handle(request, store);
                proof {
                    let k = i as int;
                    assert(handler_matches(self.registered()[k], rv));
                    assert(exists|m: int|
                        0 <= m < self.registered().len() && #[trigger] handler_matches(
                            self.registered()[m],
                            rv,
                        ) && (forall|j: int|
                            m < j < self.registered().len() ==> !handler_matches(
                                #[trigger] self.registered()[j],
                                rv,
                            )) && (store@, resp@) == handler_effect(
                            self.registered()[m],
                            rv,
                            s0,
                        ));
                }
                Some(resp)
            },
            None => None,
        }
    }
}
} // verus!
