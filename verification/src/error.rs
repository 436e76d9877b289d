//! Failures: what the disk reports, and what an operation returns.

use crate::ident::{canonical_text, hyphenated};
use vstd::prelude::*;

verus! {

/// Why an action could not be performed.
#[derive(Debug, Clone, Copy, PartialEq, Eq, Structural)]
pub enum Failure {
    /// A filesystem operation failed: create, copy, remove, read or write.
    Io,
    /// The index could not be rendered as a document.
    Serialization,
    /// The index file does not hold a document of the expected structure.
    Deserialization,
}

/// Why an operation failed.
#[derive(Debug, Clone, Copy, PartialEq, Eq, Structural)]
pub enum Error {
    /// A filesystem operation failed.
    Io,
    /// The index could not be rendered as a document.
    Serialization,
    /// The index file does not hold a document of the expected structure.
    Deserialization,
    /// The index lists no instance with this identifier.
    NotFound(u128),
    /// An image path without an extension, or one that is not text.
    InvalidInput,
}

impl Error {
    /// The error that an operation returns when an action is reported to
    /// have failed with `failure`.
    pub open spec fn of(failure: Failure) -> Error {
        match failure {
            Failure::Io => Error::Io,
            Failure::Serialization => Error::Serialization,
            Failure::Deserialization => Error::Deserialization,
        }
    }

    /// What [`Error::message`] says.
    pub open spec fn message_text(self) -> Seq<char> {
        match self {
            Error::Io => "a filesystem operation failed"@,
            Error::Serialization => "the instance index could not be serialized"@,
            Error::Deserialization => "the instance index could not be deserialized"@,
            Error::NotFound(id) => "Failed to find instance with ID `"@ + canonical_text(id) + "`"@,
            Error::InvalidInput => "the image path has no usable file extension"@,
        }
    }

    /// Surfaces a reported failure unchanged: nothing is retried
    /// and nothing is swallowed.
    pub fn from_failure(failure: Failure) -> (error: Error)
        ensures
            error == Error::of(failure),
    {
        match failure {
            Failure::Io => Error::Io,
            Failure::Serialization => Error::Serialization,
            Failure::Deserialization => Error::Deserialization,
        }
    }

    /// A line for the user. For a missing instance it names the identifier
    /// in canonical form.
    pub fn message(&self) -> (text: String)
        ensures
            text@ == self.message_text(),
    {
        match self {
            Error::Io => String::from_str("a filesystem operation failed"),
            Error::Serialization => String::from_str("the instance index could not be serialized"),
            Error::Deserialization => String::from_str(
                "the instance index could not be deserialized",
            ),
            Error::NotFound(id) => {
                let mut text = String::from_str("Failed to find instance with ID `");
                let id_text = hyphenated(*id);
                text.append(id_text.as_str());
                text.append("`");
                text
            },
            Error::InvalidInput => String::from_str("the image path has no usable file extension"),
        }
    }
}

} // verus!
