//! The faults that resolving an operand, executing an instruction or stepping
//! a scope can report.

use vstd::prelude::*;

verus! {

/// Why an operand, an instruction or a step did not complete.
///
/// Every fault is recoverable: the operation that reports one leaves the
/// memory, the variable dictionary and the scope as they were.
#[derive(Clone, Copy, Debug, PartialEq, Eq, Structural)]
pub enum ExecutionError {
    /// A variable's name has no binding in the scope's dictionary.
    NameNotBound,
    /// An identifier names no live entry of the memory.
    DanglingReference,
    /// The scope has already executed its last instruction.
    AlreadyTerminated,
}

} // verus!
