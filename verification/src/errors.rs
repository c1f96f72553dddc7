//! The error taxonomy shared by every operation of the library.

use vstd::prelude::*;

verus! {

/// Why an operation failed.
///
/// Every fallible operation of the library returns one of these; no verified
/// function panics. The `String` payloads carry the underlying OS error text,
/// supplied by the embedding application, since the library itself performs
/// no I/O.
#[derive(Debug, Clone)]
pub enum PtyError {
    /// A zero terminal size, a disallowed argument token, or a disallowed
    /// environment key.
    InvalidArgument,
    /// An unknown session id, or a missing bundled binary or script.
    ResourceNotFound,
    /// A PTY open, spawn, handle acquisition, or resize failure; wraps the
    /// underlying OS error text.
    OsResourceError(String),
    /// A write, flush, or read failure on an open PTY; wraps the underlying
    /// error text.
    IoError(String),
}

} // verus!
