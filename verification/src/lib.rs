//! A minimal HTTP/1.x request-handling core: request parsing, routing,
//! static-file and CGI-style script responses, and response serialization.
//!
//! The functions here are pure: they turn bytes and plain facts about the
//! filesystem or a finished child process into routing decisions and
//! responses. Reading the socket, probing the filesystem, running scripts
//! and writing the reply back belong to the surrounding program.

pub mod cgi;
pub mod headers;
pub mod mime;
pub mod request;
pub mod response;
pub mod router;
pub mod text;
