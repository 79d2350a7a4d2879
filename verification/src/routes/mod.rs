//! What is decided for each request to the proxy.

pub mod messages;
