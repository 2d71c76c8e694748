//! The error taxonomy of the model.

use vstd::prelude::*;

verus! {

/// Why a request against the store was refused.
///
/// Every failure is reported upward as a typed result; the model performs no
/// recovery of its own.
#[derive(Clone, Copy, Debug, PartialEq, Eq)]
pub enum Error {
    /// The requested id does not exist.
    NotFound,
    /// A foreign-key reference is missing, or a uniqueness rule on the
    /// primary key would be broken.
    ConstraintViolation,
    /// The backing store cannot be reached. A database-backed collaborator
    /// surfaces this fatally for the request; the in-memory store never
    /// raises it, and every contract of [`crate::store::Store`] rules it
    /// out.
    StorageUnavailable,
}

} // verus!
