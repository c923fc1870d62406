//! The error type shared by every operation of the store.

use vstd::prelude::*;

verus! {

/// What went wrong, by the kind of failure.
#[derive(Clone, Copy, Debug, PartialEq, Eq, Structural)]
pub enum ErrorKind {
    /// An operation was asked for on an entity in the wrong state.
    Precondition,
    /// A column or a catalog entity is missing.
    NotFound,
    /// A local file or a transfer to durable storage failed.
    Io,
    /// An invariant of the store itself was violated.
    Internal,
    /// The catalog reported a failure.
    Catalog,
}

/// An error with its kind and a message for people.
#[derive(Debug, PartialEq, Eq)]
pub struct CubeError {
    pub kind: ErrorKind,
    pub message: String,
}

impl CubeError {
    pub fn new(kind: ErrorKind, message: String) -> (e: CubeError)
        ensures
            e.kind == kind,
            e.message == message,
    {
        CubeError { kind, message }
    }

    /// A precondition violation with the given message.
    pub fn precondition(message: String) -> (e: CubeError)
        ensures
            e.kind == ErrorKind::Precondition,
            e.message == message,
    {
        CubeError { kind: ErrorKind::Precondition, message }
    }

    /// A missing column or entity, with the given message.
    pub fn not_found(message: String) -> (e: CubeError)
        ensures
            e.kind == ErrorKind::NotFound,
            e.message == message,
    {
        CubeError { kind: ErrorKind::NotFound, message }
    }

    /// An internal invariant violation with the given message.
    pub fn internal(message: String) -> (e: CubeError)
        ensures
            e.kind == ErrorKind::Internal,
            e.message == message,
    {
        CubeError { kind: ErrorKind::Internal, message }
    }

    pub fn get_kind(&self) -> (k: ErrorKind)
        ensures
            k == self.kind,
    {
        self.kind
    }

    pub fn get_message(&self) -> (m: &String)
        ensures
            m == &self.message,
    {
        &self.message
    }
}

} // verus!
