//! Certificates that the gateway orders and renews itself.

pub mod http01;
pub mod issue;
pub mod manager;
pub mod renewal;
pub mod storage;
