//! Verified core of a dock for the niri compositor: the reconnect backoff,
//! the dock's button model driven by niri events, the icon cache, the
//! launcher configuration and the request/stream protocol decisions.

pub mod application;
pub mod backoff;
pub mod config;
pub mod dock;
pub mod keyed;
pub mod ipc;
