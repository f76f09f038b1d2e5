//! Pipelines of steps, with fallible steps and their combinators, and loggers that format,
//! filter and colour log lines.

pub mod agent;
pub mod agent_ops;
pub mod completion;
pub mod logger;
pub mod op;
pub mod pipeline;
pub mod text;
pub mod try_op;
pub mod vector_store;
