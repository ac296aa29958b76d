//! Why an operation on the registry can fail.

use vstd::prelude::*;

verus! {

/// The failures of the data-access layer.
#[derive(Debug, Clone, Copy, PartialEq, Eq, Structural)]
pub enum RepositoryError {
    /// No row has the requested key, or a role code names no role.
    NotFound,
    /// The change would break a uniqueness rule or a reference between tables.
    ConstraintViolation,
    /// The table has handed out its last key.
    SequenceExhausted,
}

} // verus!
