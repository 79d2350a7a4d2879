//! Server-sent events: from the upstream's chunks to the client's events.

pub mod laws;
pub mod passage;
pub mod stream;
