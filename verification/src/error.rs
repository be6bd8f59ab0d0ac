//! What can go wrong in the debugger.

use vstd::prelude::*;

verus! {

/// What can go wrong in the debugger.
#[derive(Clone, Copy, Debug, PartialEq, Eq, Structural)]
pub enum DebugError {
    /// A file is missing.
    NotFound,
    /// Debug information could not be read.
    Malformed,
    /// The debuggee could not be started.
    ChildFailed,
    /// The debuggee is gone.
    TraceeDead,
    /// The operation does not fit the state of the debugger or debuggee.
    InvalidState,
    /// The kernel refused an operation on the debuggee.
    PtraceFailed,
}

} // verus!
