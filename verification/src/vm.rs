//! Runtime support for agents and tools: budgets, rate limits, permissions, and the
//! messages of the bytecode machine's errors.

pub mod agent;
pub mod error;
pub mod tool_registry;
