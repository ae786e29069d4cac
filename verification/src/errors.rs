//! The error taxonomy of the lifecycle request surface.

use vstd::prelude::*;

verus! {

/// Outcome class of a failed lifecycle request.
///
/// `NotFound` names an unknown container or exec id, `AlreadyExists` a
/// duplicate one, `StateConflict` an operation that the targeted process's
/// current state forbids (such as deleting a process that has not exited).
/// `Internal` stands for a failure of the sandbox engine, and `Fatal` for
/// the loss of the sandbox's exit-event stream; the verified operations
/// never produce those two, they are mapped in by the code that talks to
/// the engine.
#[derive(Clone, Copy, Debug, PartialEq, Eq, Structural)]
pub enum ShimError {
    NotFound,
    AlreadyExists,
    StateConflict,
    Internal,
    Fatal,
}

} // verus!
