//! Failures that a collection operation or a reducer can report.

use vstd::prelude::*;

verus! {

/// Error reported by collection operations and reducers.
///
/// Every failure is surfaced synchronously to the caller; nothing is
/// swallowed, and a failing operation never commits a partial change.
#[derive(Debug, Clone, Copy, PartialEq, Eq, Structural)]
pub enum StoreError {
    /// An entity with the same identity already exists (strict `add`).
    DuplicateId,
    /// The targeted identity is absent (`update`, `remove`, and
    /// domain-level field edits).
    NotFound,
}

} // verus!
