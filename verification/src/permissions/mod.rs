//! Admission control for tool calls: rules, the engine that weighs them,
//! and the protocol of hook processes.

pub mod engine;
pub mod hooks;
pub mod matcher;
pub mod types;
