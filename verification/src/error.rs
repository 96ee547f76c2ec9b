//! Error taxonomy of the host layer. Every failure is scoped to a single
//! request or to process startup; nothing is retried.

use vstd::prelude::*;

verus! {

/// Errors reported by the host layer.
///
/// `RuntimeCreationFailed` is fatal at startup: the argument list handed to
/// the engine initializer was rejected. `WrongVariant` reports a typed
/// accessor applied to a value of another discriminant: the mismatch is
/// recoverable and reported, never trapped. `OutOfBounds` reports an
/// element access past the fixed length of a vector value.
#[derive(Clone, Copy, Debug, PartialEq, Eq, Structural)]
pub enum RayforceError {
    RuntimeCreationFailed,
    WrongVariant,
    OutOfBounds,
}

impl RayforceError {
    /// A human-readable description of the error.
    pub fn message(&self) -> (r: &'static str)
        ensures
            *self is RuntimeCreationFailed ==> r@ == "Failed to create runtime"@,
            *self is WrongVariant ==> r@ == "Value has a different type"@,
            *self is OutOfBounds ==> r@ == "Element index past the end of the vector"@,
    {
        match self {
            RayforceError::RuntimeCreationFailed => "Failed to create runtime",
            RayforceError::WrongVariant => "Value has a different type",
            RayforceError::OutOfBounds => "Element index past the end of the vector",
        }
    }
}

} // verus!
