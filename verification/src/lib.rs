//! A markdown document as a catalog of runnable tasks.
//!
//! A heading at a configurable depth names a task; the fenced code blocks
//! beneath it are that task's executable steps. The library parses the
//! document into sections, keeps a registry that maps each language to a
//! runtime command and a delivery mode, and drives the sequential execution
//! of a named task's code blocks. Reading files and spawning processes is
//! left to the caller; the executor is a state machine that tells the caller
//! what to run next and consumes the exit events the caller reports back.

pub mod config;
pub mod errors;
pub mod laws;
pub mod mode;
pub mod parser;
pub mod registry;
pub mod runner;
pub mod text;
