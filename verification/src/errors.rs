//! Error taxonomy of the hub.

use vstd::prelude::*;

verus! {

/// The failure modes a hub operation can report.
///
/// - `Validation`: malformed identifiers, empty or oversized content;
///   rejected immediately, no side effects.
/// - `Forbidden`: no accepted friendship authorizes the operation;
///   nothing is persisted and nothing is delivered.
/// - `Conflict`: a relationship request where some edge already exists
///   between the pair; state unchanged.
/// - `NotFound`: an operation on a relationship edge that does not exist
///   in the required state.
/// - `Storage`: the durable store failed; the single operation fails and
///   nothing is partially applied.
#[derive(Clone, Copy, Debug, PartialEq, Eq, Structural)]
pub enum HubError {
    Validation,
    Forbidden,
    Conflict,
    NotFound,
    Storage,
}

impl HubError {
    /// A short stable label for the error, usable by transport layers.
    pub fn label(&self) -> (r: &'static str)
        ensures
            r@ == match *self {
                HubError::Validation => "validation_error"@,
                HubError::Forbidden => "forbidden_error"@,
                HubError::Conflict => "conflict_error"@,
                HubError::NotFound => "not_found_error"@,
                HubError::Storage => "storage_error"@,
            },
    {
        match *self {
            HubError::Validation => "validation_error",
            HubError::Forbidden => "forbidden_error",
            HubError::Conflict => "conflict_error",
            HubError::NotFound => "not_found_error",
            HubError::Storage => "storage_error",
        }
    }
}

} // verus!
