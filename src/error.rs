use vstd::prelude::*;

verus! {

/// Why a record was refused before any change was made.
#[derive(Debug, Clone, Copy, PartialEq, Eq, Structural)]
pub enum InvalidAddress {
    EmptyHostname,
    EmptyPassword,
    BothTargets,
    NoTarget,
}

/// The errors of the store.
#[derive(Debug, Clone, PartialEq, Eq)]
pub enum ErrorKind {
    /// The record fails validation.
    InvalidRecord(InvalidAddress),
    /// A record with this guid already exists, or a batch names it twice.
    DuplicateGuid(String),
    /// No record with this guid exists.
    NoSuchRecord(String),
    /// A bulk import was asked of a store that already holds rows.
    NonEmptyTable,
    /// The operation was interrupted and nothing it did was kept.
    Interrupted,
}

} // verus!
