//! Typed failures. Every failure is returned as a value; no function of this
//! library panics or aborts the process. Formatting for display is the
//! caller's job.

use vstd::prelude::*;

verus! {

/// Failures of the section parser and of heading-depth validation.
#[derive(Debug, Clone, PartialEq, Eq)]
pub enum ParseError {
    /// The requested heading depth lies outside `[1, 6]`.
    InvalidHeadingLevel(u8),
    /// A fenced code block was still open at the end of the document.
    UnterminatedFence,
}

/// Failures of configuration handling: override strings and mode tokens.
#[derive(Debug, Clone, PartialEq, Eq)]
pub enum ConfigError {
    /// An override entry is not of the shape `lang:command` with both sides
    /// non-empty; carries the offending entry verbatim.
    MalformedOverride(String),
    /// A mode token is none of `stdin`, `file`, `arg` (case-insensitively);
    /// carries the rejected token verbatim.
    UnrecognizedMode(String),
}

/// Failures of task resolution, before anything runs.
#[derive(Debug, Clone, PartialEq, Eq)]
pub enum LookupError {
    /// No section carries the requested title; carries that title.
    TaskNotFound(String),
    /// The task exists but its (possibly language-filtered) selection of code
    /// blocks is empty.
    NothingToExecute,
    /// A code block's language has no registered runtime; carries that
    /// language.
    LanguageNotRegistered(String),
}

/// Failures of the planning surface as a whole: either the document did not
/// parse, or the task could not be resolved.
#[derive(Debug, Clone, PartialEq, Eq)]
pub enum TaskError {
    Parse(ParseError),
    Lookup(LookupError),
}

} // verus!
