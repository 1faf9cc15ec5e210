//! The command shell core of a binary-analysis tool: a registry of named
//! command handlers, typo-tolerant suggestions, and an execution context
//! with a location cursor and buffered output sinks.

pub mod commands;
pub mod distance;
pub mod err;
pub mod helper;
pub mod io;
pub mod number;
pub mod shell;
pub mod writer;
