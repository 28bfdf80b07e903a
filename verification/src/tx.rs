//! Errors and statuses of transactions.

use vstd::prelude::*;

verus! {

/// Why a transaction failed.
#[derive(PartialEq, Eq, Structural, Debug, Clone, Copy)]
pub enum ErrorKind {
    Conflict,
}

/// An error indicating that the transaction has failed. It is typical to route it back to where
/// the transaction is retried.
#[derive(PartialEq, Eq, Structural, Debug, Clone, Copy)]
pub struct Error {
    kind: ErrorKind,
}

impl Error {
    /// The error of a transaction that conflicted with another.
    pub fn conflict() -> (r: Error)
        ensures
            r == Error::conflict_spec(),
    {
        Error { kind: ErrorKind::Conflict }
    }

    /// The conflict error.
    pub closed spec fn conflict_spec() -> Error {
        Error { kind: ErrorKind::Conflict }
    }

    /// The reason of the failure.
    pub fn kind(&self) -> (r: ErrorKind)
        ensures
            r == ErrorKind::Conflict,
    {
        self.kind
    }
}

/// An error indicating that the transaction has failed to set `value`.
#[derive(Debug)]
pub struct SetError<T> {
    /// The value that was not set.
    pub value: T,
    /// The reason for the failure.
    pub error: Error,
}

impl<T> SetError<T> {
    /// Applies `f` to the value, keeping the error.
    pub fn map<F: FnOnce(T) -> U, U>(self, f: F) -> (r: SetError<U>)
        requires
            f.requires((self.value,)),
        ensures
            f.ensures((self.value,), r.value),
            r.error == self.error,
    {
        SetError { value: f(self.value), error: self.error }
    }

    /// The error, dropping the value.
    pub fn into_error(self) -> (r: Error)
        ensures
            r == self.error,
    {
        self.error
    }
}

/// What a transaction that does not wish to continue asks for.
#[derive(Debug, PartialEq, Eq, Structural, Clone, Copy)]
pub enum InternalStatus {
    /// The transaction failed.
    Error(Error),
    /// The transaction waits for a change to its read set, then retries.
    Retry,
}

/// A transaction that does not wish to continue: it failed, or awaits a retry.
#[derive(Debug, PartialEq, Eq, Structural, Clone, Copy)]
pub struct Status {
    pub kind: InternalStatus,
}

impl Status {
    /// The status requesting a retry after another transaction modifies the read set.
    pub fn await_retry() -> (r: Status)
        ensures
            r.kind == InternalStatus::Retry,
    {
        Status { kind: InternalStatus::Retry }
    }

    /// The status of a failed transaction.
    pub fn from_error(error: Error) -> (r: Status)
        ensures
            r.kind == InternalStatus::Error(error),
    {
        Status { kind: InternalStatus::Error(error) }
    }

    /// The status of a transaction that failed to set a value.
    pub fn from_set_error<T>(set_error: SetError<T>) -> (r: Status)
        ensures
            r.kind == InternalStatus::Error(set_error.error),
    {
        Status::from_error(set_error.error)
    }
}

/// Error indicating that a read transaction failed to start, because a transaction is already
/// running on the thread.
#[derive(Debug)]
pub struct TryReadErr {
    _private: (),
}

impl TryReadErr {
    /// The error.
    pub fn new() -> (r: Self) {
        TryReadErr { _private: () }
    }
}

/// Error indicating that a read write transaction failed to start, because a transaction is
/// already running on the thread.
#[derive(Debug)]
pub struct TryRwErr {
    _private: (),
}

impl TryRwErr {
    /// The error.
    pub fn new() -> (r: Self) {
        TryRwErr { _private: () }
    }
}

/// Types stored in thread locals may implement this for hooks run once the value is at its
/// final address and just before it is destroyed.
pub trait PhoenixTarget: Default {
    /// Called after creation.
    fn subscribe(&mut self) {
    }

    /// Called before destruction.
    fn unsubscribe(&mut self) {
    }
}

} // verus!
