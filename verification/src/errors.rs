use vstd::prelude::*;

verus! {

/// The error taxonomy of the library: every fallible operation reports
/// exactly one of these kinds.
#[derive(Debug, Clone, Copy, PartialEq, Eq, Structural)]
pub enum AppError {
    /// Malformed input, rejected before any effect.
    Validation,
    /// The acting employee lacks the required right.
    Authorization,
    /// The operation lost to an earlier, conflicting transition.
    Conflict,
    /// An id did not resolve to a record.
    NotFound,
    /// A storage or connection failure.
    Internal,
}

/// A human-readable error payload, carried beside an `AppError` by the
/// transport layer.
#[derive(Debug, Clone)]
pub struct ErrMessage {
    pub error: String,
}

} // verus!
