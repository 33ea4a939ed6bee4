//! A small HTTP/1.1 server core: framing of requests read from a byte
//! stream, parsing of the request line and headers, routing to handlers,
//! and serialization of responses.

pub mod bytes;
pub mod reader;
pub mod request;
pub mod response;
pub mod router;
