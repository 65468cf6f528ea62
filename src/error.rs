//! Errors reported by the tools.
use vstd::prelude::*;

verus! {

/// What went wrong, by category.
#[derive(Clone, Copy, Debug, PartialEq, Eq, Structural)]
pub enum ErrorKind {
    /// A path is not absolute.
    InvalidPath,
    /// A path or command is excluded by the ignore rules.
    PermissionDenied,
    /// A file that must exist does not.
    NotFound,
    /// A directory was given where a file is expected.
    InvalidTarget,
    /// A file or an input is over the size limit.
    TooLarge,
    /// The output of a shell command is over the size limit.
    OutputTooLarge,
    /// The text to replace occurs more than once.
    AmbiguousMatch,
    /// The text to replace does not occur.
    NoMatch,
    /// There is no edit to undo.
    NoHistory,
    /// The editor command is unknown, or lacks an argument it needs.
    InvalidCommand,
    /// An argument has a value that is not allowed.
    InvalidArgument,
}

/// A failed tool call: its category and a message for the caller.
#[derive(Debug)]
pub struct ToolError {
    pub kind: ErrorKind,
    pub message: String,
}

/// Builds an error of the given kind.
pub fn tool_error(kind: ErrorKind, message: String) -> (r: ToolError)
    ensures
        r.kind == kind,
        r.message@ == message@,
{
    ToolError { kind, message }
}

} // verus!
