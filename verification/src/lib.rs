//! A small HTTP/1.1 request and response model: typed start-lines, headers,
//! versions and status codes, a parser from a raw buffer, a router over a
//! handful of fixed routes, and the serializer of the answer.
//!
//! Every function states what it computes over sequences of characters and
//! bytes, and the statements are machine-checked.

pub mod error;
pub mod http;
pub mod number;
pub mod text;
