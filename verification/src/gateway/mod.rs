//! The gateway proper: connections, requests, and the relays behind them.

pub mod diagnostics;
pub mod frame;
pub mod h2_websocket;
pub mod listener;
pub mod pump;
pub mod relay;
pub mod websocket;
