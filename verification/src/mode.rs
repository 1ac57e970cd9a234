//! The execution mode: how a code block's text reaches its runtime.

use vstd::prelude::*;
use crate::errors::ConfigError;
use crate::text::lower_seq;

verus! {

/// The three delivery strategies for a code block's body.
#[derive(Clone, Copy, Debug, PartialEq, Eq, Structural)]
pub enum ExecutionMode {
    /// Write the body to the spawned process's standard input.
    Stdin,
    /// Write the body to a temporary file and pass that file's path as the
    /// first argument.
    File,
    /// Pass the body itself as a single command-line argument.
    Arg,
}

/// The mode named by a token, compared case-insensitively: `stdin`, `file`
/// and `arg` are the whole accepted set.
pub open spec fn spec_mode_of(t: Seq<char>) -> Option<ExecutionMode> {
    let l = lower_seq(t);
    if l == "stdin"@ {
        Some(ExecutionMode::Stdin)
    } else if l == "file"@ {
        Some(ExecutionMode::File)
    } else if l == "arg"@ {
        Some(ExecutionMode::Arg)
    } else {
        None
    }
}

impl ExecutionMode {
    /// Parses a mode token case-insensitively; any token outside the accepted
    /// set is rejected by name.
    pub fn try_from(s: &str) -> (r: Result<ExecutionMode, ConfigError>)
        ensures
            match spec_mode_of(s@) {
                Some(m) => r == Ok::<ExecutionMode, ConfigError>(m),
                None => (r matches Err(e) && e matches ConfigError::UnrecognizedMode(t) && t@
                    == s@),
            },
    {
        let lowered = crate::text::ascii_lowercase(s);
        if lowered == String::from_str("stdin") {
            Ok(ExecutionMode::Stdin)
        } else if lowered == String::from_str("file") {
            Ok(ExecutionMode::File)
        } else if lowered == String::from_str("arg") {
            Ok(ExecutionMode::Arg)
        } else {
            Err(ConfigError::UnrecognizedMode(s.to_owned()))
        }
    }
}

} // verus!
