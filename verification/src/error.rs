//! The error taxonomy of a build run.

use vstd::prelude::*;

verus! {

/// Everything that can go wrong while preparing or running a build.
///
/// Encoding failures have no variant here: the substitution engine works
/// directly on bytes and never needs to decode a whole buffer, so the
/// graceful-fallback policy leaves nothing to report.
#[derive(Debug)]
pub enum LatexError {
    /// `run` was called with an empty input set; nothing was staged.
    NoInput,
    /// A logical path would escape the workspace root (absolute, or a
    /// `..` segment). Carries the offending path.
    BadPath(String),
    /// A filesystem operation failed. Carries a description of the
    /// underlying OS error.
    Io(String),
    /// Both compiler passes completed but the expected artifact was not
    /// found at the workspace root.
    Compilation,
    /// The external compiler executable could not be started at all.
    ProcessInvocation(String),
}

impl LatexError {
    /// True exactly for the variant reporting an empty input set.
    pub fn is_no_input(&self) -> (r: bool)
        ensures
            r == (self is NoInput),
    {
        match self {
            LatexError::NoInput => true,
            _ => false,
        }
    }
}

} // verus!
