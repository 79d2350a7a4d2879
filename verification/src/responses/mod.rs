//! The OpenAI Responses side of the proxy.

pub mod laws;
pub mod readback;
pub mod request;
pub mod requests;
pub mod types;
