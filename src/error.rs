use vstd::prelude::*;

verus! {

/// The ways an operation of the tracker can fail. Nothing is retried: each
/// failure reaches the caller as it happened.
#[derive(Debug, PartialEq, Eq)]
pub enum TrackerError {
    /// An I/O or transport failure of a storage backend.
    Storage(String),
    /// A query failure of a database backend.
    Database(String),
    /// A persisted structure could not be encoded or decoded.
    Serialization(String),
    /// A lifecycle rule was broken, or stored content failed its integrity check.
    InvalidOperation(String),
    /// A referenced entity does not exist.
    NotFound(String),
}

/// The result of a tracker operation.
pub type Result<T> = core::result::Result<T, TrackerError>;

} // verus!
