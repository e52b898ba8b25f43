//! The failures that the persistence gateway reports.

use vstd::prelude::*;

verus! {

/// Why a call to the persistence gateway failed.
#[derive(Clone, Copy, Debug, PartialEq, Eq, Structural)]
pub enum GatewayError {
    /// The store could not be reached.
    ConnectionError,
    /// No record carries the identifier that the call named.
    NotFound,
    /// The input breaks a rule of the store: a task without a title, or an
    /// identifier that is already taken.
    ConstraintError,
    /// The store was busy with another access.
    SerializationError,
}

} // verus!
