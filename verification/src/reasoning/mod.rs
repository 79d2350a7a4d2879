//! Reasoning effort, and whether reasoning is asked for and replayed.

pub mod apply_effort;
pub mod replay;
