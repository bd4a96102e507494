//! In-memory system backend for an embedded interpreter: an ordered output
//! log, a virtual file store, a task registry and a host command bridge.

pub mod backend;
pub mod command;
pub mod lines;
pub mod output;
pub mod png;
pub mod tasks;
