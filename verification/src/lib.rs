//! The verified core of a proxy that serves the Anthropic Messages API from
//! OpenAI-compatible upstreams.

pub mod anthropic;
pub mod cache;
pub mod config;
pub mod conversation;
pub mod ids;
pub mod json;
pub mod openai;
pub mod reasoning;
pub mod responses;
pub mod routes;
pub mod settings;
pub mod sse;
pub mod table;
pub mod text;
pub mod views;
