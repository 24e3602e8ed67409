//! The store's error taxonomy.

use vstd::prelude::*;

verus! {

/// Every failure a store operation can report.
///
/// `DirectoryUnavailable` is fatal and arises only when opening a store;
/// `RecordAccessError` and `RecordNotFound` are recoverable per-record
/// failures that leave the store intact.
#[derive(Clone, Copy, Debug, PartialEq, Eq, Structural)]
pub enum StoreError {
    /// The root directory does not exist and cannot be created, or the
    /// root path is unusable (for example, empty).
    DirectoryUnavailable,
    /// A record operation failed: the name is invalid or the backing
    /// file could not be accessed.
    RecordAccessError,
    /// A read was asked for a name that has no backing record.
    RecordNotFound,
}

impl StoreError {
    /// A descriptive message, suitable for printing at the prompt.
    pub fn message(&self) -> (r: &'static str)
        ensures
            match self {
                StoreError::DirectoryUnavailable => r@ == "database directory unavailable"@,
                StoreError::RecordAccessError => r@ == "record access error"@,
                StoreError::RecordNotFound => r@ == "record not found"@,
            },
    {
        match self {
            StoreError::DirectoryUnavailable => "database directory unavailable",
            StoreError::RecordAccessError => "record access error",
            StoreError::RecordNotFound => "record not found",
        }
    }
}

} // verus!
