//! Parameters handed to the storage collaborator when writing tables.
//!
//! The storage engine exposes create/add operations that take a write mode;
//! this module validates the textual form of that mode. An unrecognized
//! string is a configuration error, reported before any write is attempted.

use vstd::prelude::*;

use crate::error::Error;
use crate::strings::str_eq;

verus! {

/// The mode of a bulk write handed to the storage collaborator.
#[derive(Debug, Clone, Copy, PartialEq, Eq, Structural)]
pub enum WriteMode {
    /// Create the table; fail if it already exists.
    Create,
    /// Append to the existing table.
    Append,
    /// Replace the table's contents.
    Overwrite,
}

/// The write mode a string names, if any.
pub open spec fn write_mode_of(s: Seq<char>) -> Option<WriteMode> {
    if s == "create"@ {
        Some(WriteMode::Create)
    } else if s == "append"@ {
        Some(WriteMode::Append)
    } else if s == "overwrite"@ {
        Some(WriteMode::Overwrite)
    } else {
        None
    }
}

/// The message reported for a string that names no write mode.
pub open spec fn invalid_write_mode_message(s: Seq<char>) -> Seq<char> {
    "invalid write mode "@ + s
}

/// Parses the textual form of a write mode; an unrecognized string is
/// rejected as invalid input naming the offending string.
pub fn parse_write_mode(s: &str) -> (r: Result<WriteMode, Error>)
    ensures
        match write_mode_of(s@) {
            Some(m) => r == Ok::<WriteMode, Error>(m),
            None => (r matches Err(e) && e matches Error::InvalidInput { message } && message@
                == invalid_write_mode_message(s@)),
        },
{
    if str_eq(s, "create") {
        Ok(WriteMode::Create)
    } else if str_eq(s, "append") {
        Ok(WriteMode::Append)
    } else if str_eq(s, "overwrite") {
        Ok(WriteMode::Overwrite)
    } else {
        let mut message = String::new();
        message.append("invalid write mode ");
        message.append(s);
        proof {
            assert(message@ =~= invalid_write_mode_message(s@));
        }
        Err(Error::InvalidInput { message })
    }
}

} // verus!
