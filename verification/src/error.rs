//! The error taxonomy shared by every fallible operation of the library.

use vstd::prelude::*;

verus! {

/// Why an operation could not complete.
///
/// Construction-time validation reports `MissingData`, `InvalidData`,
/// `Unsupported` or `NotFound` eagerly, before any I/O happens. Transfer
/// loops distinguish the transient conditions `Interrupted` (always retried
/// at the point of occurrence) and `NotReady` (retried only by the top-level
/// copy loop) from the fatal ones.
#[derive(Clone, Copy, Debug, PartialEq, Eq, Structural)]
pub enum PhonicError {
    /// A required field was absent when a specification was built.
    MissingData,
    /// A malformed header, a mismatched codec or field, or a structural
    /// violation such as a transfer that broke block alignment.
    InvalidData,
    /// A recognized but unimplemented format or codec.
    Unsupported,
    /// No identifier matched, or a stream index was out of range.
    NotFound,
    /// A reader and a writer disagreed on their signal specification.
    SignalMismatch,
    /// An exact transfer could not be completed.
    EndOfStream,
    /// A transient interruption; retried immediately wherever it occurs.
    Interrupted,
    /// Transient backpressure; retried only by the top-level transfer loop.
    NotReady,
}

impl PhonicError {
    /// Whether retrying the failed operation may succeed without any other
    /// change: true exactly for `Interrupted` and `NotReady`.
    pub open spec fn is_transient(self) -> bool {
        self == PhonicError::Interrupted || self == PhonicError::NotReady
    }

    /// Whether an operation failing with this error is known to have
    /// consumed nothing: the transient failures and a reported end of
    /// stream leave the stream's model exactly where it was.
    pub open spec fn is_nonconsuming(self) -> bool {
        self.is_transient() || self == PhonicError::EndOfStream
    }
}

} // verus!
