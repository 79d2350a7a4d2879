//! The OpenAI Chat Completions side of the proxy.

pub mod answers;
pub mod converter;
pub mod laws;
pub mod pieces;
pub mod readings;
pub mod types;
