//! Unary and streaming calls that pass through to HTTP/2 backends.

pub mod proxy;
pub mod routes;
