use message_board::http::{HttpContentType, HttpResult, HttpServer, Request};
use message_board::message::message_buffer::MessageBuffer;
use message_board::route::get_messages::GetMessages;
use message_board::route::method::Method;
use message_board::route::post_messages::PostMessages;
use message_board::route::route::{Handler, StaticRoute};

fn board() -> HttpServer {
    let mut server = HttpServer::new();
    server.add_route(Handler::StaticContent(StaticRoute::new(
        "/",
        Method::GET,
        HttpContentType::Html,
        "<html>index</html>",
    )));
    server.add_route(Handler::StaticContent(StaticRoute::new(
        "/style.css",
        Method::GET,
        HttpContentType::Stylesheet,
        "body {}",
    )));
    server.add_route(Handler::WriteMessage(PostMessages::new()));
    server.add_route(Handler::ReadMessages(GetMessages::new()));
    server
}

fn post(body: Option<&str>, peer: Option<&str>) -> Request {
    Request {
        path: "/messages".to_string(),
        method: Method::POST,
        data: body.map(|b| b.to_string()),
        peer: peer.map(|p| p.to_string()),
    }
}

fn get(path: &str) -> Request {
    Request {
        path: path.to_string(),
        method: Method::GET,
        data: None,
        peer: None,
    }
}

#[test]
fn post_without_body_is_rejected() {
    let server = board();
    let mut store = MessageBuffer::new();
    let resp = server.dispatch(post(None, None), &mut store).unwrap();
    assert_eq!(resp.status, HttpResult::InvalidRequest);
    assert_eq!(resp.status.code(), 400);
    assert_eq!(resp.data, "No message given");
    assert_eq!(store.cached(), "");
}

#[test]
fn post_with_long_body_is_rejected() {
    let server = board();
    let mut store = MessageBuffer::new();
    let body = "a".repeat(400);
    let resp = server.dispatch(post(Some(&body), None), &mut store).unwrap();
    assert_eq!(resp.status, HttpResult::InvalidRequest);
    assert_eq!(resp.data, "Message too long");
    assert_eq!(store.cached(), "");
}

#[test]
fn body_at_the_maximum_length_is_accepted() {
    let server = board();
    let mut store = MessageBuffer::new();
    let body = "x".repeat(321);
    let resp = server
        .dispatch(post(Some(&body), Some("1.2.3.4")), &mut store)
        .unwrap();
    assert_eq!(resp.status, HttpResult::Success);
    assert_eq!(resp.status.code(), 200);
    assert_eq!(resp.content_type, HttpContentType::Json);
    assert!(resp.data.contains(&body));
}

#[test]
fn body_one_over_the_maximum_is_rejected() {
    let server = board();
    let mut store = MessageBuffer::new();
    let body = "x".repeat(322);
    let resp = server.dispatch(post(Some(&body), None), &mut store).unwrap();
    assert_eq!(resp.status, HttpResult::InvalidRequest);
    assert_eq!(resp.data, "Message too long");
}

#[test]
fn write_then_read_round_trip() {
    let server = board();
    let mut store = MessageBuffer::new();
    let write = server
        .dispatch(post(Some("hello"), Some("9.8.7.6")), &mut store)
        .unwrap();
    assert_eq!(write.status, HttpResult::Success);
    assert_eq!(
        write.data,
        "[{\"id\":0,\"author\":\"9.8.7.6\",\"message\":\"hello\"}]"
    );
    let read = server.dispatch(get("/messages"), &mut store).unwrap();
    assert_eq!(read.status, HttpResult::Success);
    assert_eq!(read.content_type, HttpContentType::Json);
    assert_eq!(read.data, write.data);
}

#[test]
fn unresolved_peer_becomes_unknown_ip() {
    let server = board();
    let mut store = MessageBuffer::new();
    let resp = server.dispatch(post(Some("hey"), None), &mut store).unwrap();
    assert_eq!(resp.status, HttpResult::Success);
    assert_eq!(
        resp.data,
        "[{\"id\":0,\"author\":\"Unknown IP\",\"message\":\"hey\"}]"
    );
}

#[test]
fn static_routes_answer_unconditionally() {
    let server = board();
    let mut store = MessageBuffer::new();
    let index = server.dispatch(get("/"), &mut store).unwrap();
    assert_eq!(index.status, HttpResult::Success);
    assert_eq!(index.content_type, HttpContentType::Html);
    assert_eq!(index.data, "<html>index</html>");
    let css = server.dispatch(get("/style.css"), &mut store).unwrap();
    assert_eq!(css.content_type, HttpContentType::Stylesheet);
    assert_eq!(css.content_type.mime(), "text/css");
    assert_eq!(css.data, "body {}");
}

#[test]
fn unknown_route_is_not_dispatched() {
    let server = board();
    let mut store = MessageBuffer::new();
    assert!(server.dispatch(get("/nope"), &mut store).is_none());
    let wrong_method = Request {
        path: "/".to_string(),
        method: Method::POST,
        data: None,
        peer: None,
    };
    assert!(server.dispatch(wrong_method, &mut store).is_none());
}

#[test]
fn later_registration_wins() {
    let mut server = board();
    server.add_route(Handler::StaticContent(StaticRoute::new(
        "/",
        Method::GET,
        HttpContentType::Html,
        "<html>newer</html>",
    )));
    let mut store = MessageBuffer::new();
    let resp = server.dispatch(get("/"), &mut store).unwrap();
    assert_eq!(resp.data, "<html>newer</html>");
}

#[test]
fn status_codes_and_mime_names() {
    assert_eq!(HttpResult::Success.code(), 200);
    assert_eq!(HttpResult::InvalidRequest.code(), 400);
    assert_eq!(HttpResult::InternalServerError.code(), 500);
    assert_eq!(HttpContentType::Html.mime(), "text/html");
    assert_eq!(HttpContentType::Javascript.mime(), "application/javascript");
    assert_eq!(HttpContentType::Json.mime(), "application/json");
}

#[test]
fn handler_accessors_describe_their_routes() {
    let read = GetMessages::new();
    assert_eq!(read.route(), "/messages");
    assert_eq!(read.method(), Method::GET);
    let write = PostMessages::new();
    assert_eq!(write.route(), "/messages");
    assert_eq!(write.method(), Method::POST);
    let fixed = StaticRoute::new("/x", Method::GET, HttpContentType::Html, "c");
    assert_eq!(fixed.route(), "/x");
    assert_eq!(fixed.method(), Method::GET);
}

#[test]
fn default_store_is_empty() {
    let store = MessageBuffer::default();
    assert_eq!(store.cached(), "");
}
