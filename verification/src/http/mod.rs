//! Requests and replies, and what the gateway takes from the `http` types that `hyper` exports.

pub mod headers;
pub mod reply;
pub mod request;
pub mod uri;
