//! A small HTTP/1.1 request/response engine: framing of a request,
//! routing with path parameters, and a response writer that sends once.
pub mod parser;
pub mod request;
pub mod response;
pub mod router;
pub mod server;
pub mod status;
pub mod strmap;
pub mod text;

pub use parser::{body_length, get_headers, parse_usize};
pub use request::Request;
pub use response::Response;
pub use router::{Handler, Route, Router};
pub use server::Server;
pub use status::{HttpStatus, StatusArg};
pub use strmap::StrMap;
