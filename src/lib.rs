//! Parsing of HTTP/1.1 request lines into method, path and query parameters, the handler
//! contract that turns them into responses, and the responses' wire format.
pub mod method;
pub mod query_string;
pub mod request;
pub mod response;
pub mod server;
pub mod site_handler;
pub mod status_code;
pub mod text;

pub use method::{Method, MethodError};
pub use query_string::{QueryString, Value};
pub use request::{ParseError, Request};
pub use response::Response;
pub use server::{Handler, Server};
pub use site_handler::SiteHandler;
pub use status_code::StatusCode;
