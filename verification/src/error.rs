//! The ways an operation on the store can fail.

use vstd::prelude::*;

verus! {

/// Why an operation was refused. A refused operation leaves the store as it
/// was.
#[derive(Debug, Clone, Copy, PartialEq, Eq, Structural, Hash)]
pub enum Error {
    /// The file, or the revision asked for, is not there.
    NotFound,
    /// A live file of the target container already has the name.
    Conflict,
    /// The request cannot be carried out as it is written.
    Validation,
    /// The store cannot take the write.
    StorageFailure,
}

} // verus!
