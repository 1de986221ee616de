pub mod get_messages;
pub mod method;
pub mod post_messages;
pub mod route;
