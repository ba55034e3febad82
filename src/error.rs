use vstd::prelude::*;

verus! {

/// What an operation of the chapter service may fail with.
#[derive(Debug, Clone, Copy, PartialEq, Eq, Structural)]
pub enum Error {
    /// The course or chapter is absent, or the caller does not own the course.
    NotFound,
    /// A chapter cannot be published: description, video URL or asset missing.
    ValidationFailed,
    /// The video provider refused the credentials.
    ProviderUnauthorized,
    /// The video provider failed on its side.
    ProviderServerError,
    /// Any other reply of the video provider that is not a creation.
    ProviderRequestFailed,
    /// The store refused a write (a duplicate key, a value out of its range).
    StoreFailure,
}

} // verus!
