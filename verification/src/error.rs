//! The error type shared by the library.

use vstd::prelude::*;

verus! {

/// What went wrong, as text; the storage and I/O variants carry the
/// underlying error's message.
#[derive(Debug, Clone, PartialEq, Eq)]
pub enum Error {
    Sqlite(String),
    Migration(String),
    Io { path: String, message: String },
    Config(String),
    Http(String),
    Parse(String),
    /// Retry after this many milliseconds.
    RateLimited(u64),
    Other(String),
}

impl Error {
    /// A parse error with the given message.
    pub fn parse(msg: &str) -> (e: Error)
        ensures
            e matches Error::Parse(m) && m@ == msg@,
    {
        Error::Parse(msg.to_owned())
    }
}

} // verus!
