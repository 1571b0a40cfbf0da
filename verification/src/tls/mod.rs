//! Certificates: what their files hold, which names they cover, and which one a client gets.

pub mod anchors;
pub mod certificate;
pub mod discovery;
pub mod resolver;
pub mod store;
