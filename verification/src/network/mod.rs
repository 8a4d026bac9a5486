//! The texts spoken on the wire: requests, responses, event frames, and
//! the handlers that turn a request into a command for a room.

pub mod form;
pub mod handlers;
pub mod http;
pub mod scan;
pub mod sse;

pub use handlers::route_request;
pub use http::{HttpRequest, HttpResponse};
