//! The error kinds every operation can surface. Errors are never retried or
//! recovered from: an operation either fully succeeds or stops at the first
//! error it meets.

use vstd::prelude::*;

verus! {

/// One error kind per failure class:
/// - `ConfigurationMissing`: a required credential or environment value is absent.
/// - `NotFound`: an operation targeted a task id absent from the backend.
/// - `RemoteRejected`: the remote service answered with a non-2xx status;
///   the status and the response body are carried along.
/// - `Malformed`: a payload failed to parse into the task shape.
/// - `IoFailure`: file or database access failed.
#[derive(Debug)]
pub enum Error {
    ConfigurationMissing,
    NotFound,
    RemoteRejected { status: u16, body: String },
    Malformed,
    IoFailure,
}

impl Error {
    /// True exactly on the `NotFound` kind; lets callers test the kind
    /// without an equality on the carried body.
    pub fn is_not_found(&self) -> (r: bool)
        ensures
            r == (self is NotFound),
    {
        match self {
            Error::NotFound => true,
            _ => false,
        }
    }
}

} // verus!
