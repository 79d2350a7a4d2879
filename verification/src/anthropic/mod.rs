//! The Anthropic Messages side of the proxy.

pub mod converter;
pub mod laws;
pub mod requests;
pub mod types;
