//! The logic of an edge gateway: configuration, routing, relaying, certificates
//! and counters, with contracts that Verus proves.

pub mod acme;
pub mod config;
pub mod fallback;
pub mod gateway;
pub mod grpc;
pub mod http;
pub mod net;
pub mod observability;
pub mod order;
pub mod paths;
pub mod routes;
pub mod shared;
pub mod text;
pub mod time;
pub mod tls;
