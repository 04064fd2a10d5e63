//! Errors of storage operations.

use vstd::prelude::*;
use crate::text::{concat, owned};

verus! {

/// Errors that can occur during storage operations. Each carries the words of its cause.
#[derive(Debug, Clone, PartialEq, Eq)]
pub enum StorageError {
    /// SQLite query or schema error.
    Database(String),
    /// Connection pool exhausted or initialization failure.
    Pool(String),
    /// Filesystem read/write error.
    Io(String),
    /// A spawned blocking task panicked or was cancelled.
    Join(String),
    /// Catch-all for errors that don't fit another variant.
    Other(String),
}

impl StorageError {
    /// The error in words.
    pub open spec fn words(self) -> Seq<char> {
        match self {
            StorageError::Database(s) => "database error: "@ + s@,
            StorageError::Pool(s) => "connection pool error: "@ + s@,
            StorageError::Io(s) => "io error: "@ + s@,
            StorageError::Join(s) => "task join error: "@ + s@,
            StorageError::Other(s) => s@,
        }
    }

    /// Whether the error is an unclassified one with this message.
    pub open spec fn is_other(self, message: Seq<char>) -> bool {
        self is Other && self->Other_0@ == message
    }

    /// The error in words.
    pub fn message(&self) -> (r: String)
        ensures
            r@ == self.words(),
    {
        match self {
            StorageError::Database(s) => concat("database error: ", s.as_str()),
            StorageError::Pool(s) => concat("connection pool error: ", s.as_str()),
            StorageError::Io(s) => concat("io error: ", s.as_str()),
            StorageError::Join(s) => concat("task join error: ", s.as_str()),
            StorageError::Other(s) => owned(s.as_str()),
        }
    }
}

/// An error says where it comes from and what was said there.
pub proof fn a_storage_error_says_its_cause(error: StorageError, r: String)
    requires
        call_ensures(StorageError::message, (&error,), r),
    ensures
        error matches StorageError::Database(s) ==> r@ == "database error: "@ + s@,
        error matches StorageError::Pool(s) ==> r@ == "connection pool error: "@ + s@,
        error matches StorageError::Io(s) ==> r@ == "io error: "@ + s@,
        error matches StorageError::Join(s) ==> r@ == "task join error: "@ + s@,
        error matches StorageError::Other(s) ==> r@ == s@,
        forall|message: Seq<char>| #[trigger]
            error.is_other(message) <==> error is Other && error->Other_0@ == message,
{
}

} // verus!
