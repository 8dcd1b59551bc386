//! The error kinds the engine distinguishes: storage failures, rejected
//! batches, and rejected configuration values. A miss is not an error; it is
//! the `NotFound` outcome variant.

use vstd::prelude::*;

verus! {

/// A storage-level failure: a connection could not be opened or a query
/// failed. Surfaced to the caller, never silently swallowed.
#[derive(Debug, Clone, PartialEq, Eq)]
pub struct StorageError {
    pub message: String,
}

impl StorageError {
    /// A readable description of the failure.
    pub fn message(&self) -> (m: &str)
        ensures
            m@ == self.message@,
    {
        self.message.as_str()
    }
}

/// Why a batch resolution failed.
#[derive(Debug, Clone, PartialEq, Eq)]
pub enum BatchError {
    /// The batch exceeds the configured ceiling; no lookup was performed.
    TooLarge,
    /// The storage layer failed.
    Storage(StorageError),
}

/// Why a configuration value was rejected. Rejection happens before any
/// mutation: the previously active configuration stays in force.
#[derive(Debug, Clone, PartialEq, Eq)]
pub enum ValidationError {
    /// The batch ceiling must be strictly positive.
    ZeroBatchLimit,
    /// The bind address does not parse as an `IPv4:port` address.
    InvalidBindAddress,
    /// The storage-switch target exists but holds no mapping table.
    MissingMappingTable,
    /// The storage-switch target exists but could not be opened or inspected.
    StorageUnavailable,
}

} // verus!
