//! A static-content HTTP/1.1 server core: request parsing, routing onto a
//! web root, a bounded first-in-first-out file cache, content-encoding
//! negotiation and the byte-exact response format.
//!
//! Everything here is plain computation. Reading sockets, files and
//! directories is left to the caller, who hands the results in as plain
//! values.

pub mod cache;
pub mod clock;
pub mod codec;
pub mod config;
pub mod exception;
pub mod pages;
pub mod param;
pub mod payload;
pub mod request;
pub mod response;
pub mod router;
pub mod text;
pub mod util;
