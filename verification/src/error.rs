//! The error taxonomy of the library.
//!
//! `InvalidInput` reports malformed or unsupported user-supplied
//! configuration (an unknown index kind, an unsupported tokenizer language, a
//! bad distance-type string, a malformed database URL, a non-ASCII header
//! value, a 4xx response). `Runtime` reports unexpected failures surfaced
//! from the storage or transport layer, such as a non-4xx HTTP failure.

use vstd::prelude::*;

verus! {

/// An error reported by this library. Each variant carries a human-readable
/// message.
#[derive(Debug, Clone)]
pub enum Error {
    /// Malformed or unsupported user-supplied configuration.
    InvalidInput { message: String },
    /// An unexpected failure from the storage or transport layer.
    Runtime { message: String },
}

impl Error {
    /// The message carried by this error, whatever its variant.
    pub fn message(&self) -> (r: &str)
        ensures
            r@ == self.message_view(),
    {
        match self {
            Error::InvalidInput { message } => message.as_str(),
            Error::Runtime { message } => message.as_str(),
        }
    }

    /// The message carried by this error, as a sequence of characters.
    pub open spec fn message_view(&self) -> Seq<char> {
        match self {
            Error::InvalidInput { message } => message@,
            Error::Runtime { message } => message@,
        }
    }
}

} // verus!
